use vstd::prelude::*;

use crate::opcode::{decode, decode_spec, Instr};
use crate::screen::{blank_grid, collides, drawn, Screen};

verus! {

/// Size of memory in bytes.
pub const MEMORY_SIZE: usize = 4096;

/// Address of the first program byte, and the initial program counter.
pub const PROGRAM_START: u16 = 0x200;

/// Most bytes a program can occupy: it is loaded into `0x200..0xFFF`.
pub const PROGRAM_CAPACITY: usize = 0xDFF;

/// Depth of the call stack.
pub const STACK_DEPTH: usize = 16;

/// Whether execution is suspended until a key is released.
#[derive(Clone, Copy, PartialEq, Eq, Structural, Debug)]
pub enum KeyWait {
    /// Instructions execute.
    Running,
    /// Waiting for a key release, whose index goes into the named register.
    Waiting(u8),
}

/// Behaviours on which CHIP-8 dialects disagree.
#[derive(Clone, Copy, PartialEq, Eq, Structural, Debug)]
pub struct Quirks {
    /// `8xy1`, `8xy2` and `8xy3` also set `VF` to 0.
    pub logic_resets_flag: bool,
    /// `8xy6` and `8xyE` shift `Vy` (instead of `Vx`) into `Vx`.
    pub shift_reads_vy: bool,
}

/// Why the interpreter stopped.
#[derive(Clone, Copy, PartialEq, Eq, Structural, Debug)]
pub enum FaultKind {
    /// The word at the program counter is no instruction.
    UnknownOpcode,
    /// An instruction reads or writes outside memory, or the index register
    /// would leave its sixteen bits.
    MemoryOutOfRange,
    /// A call with sixteen return addresses already on the stack.
    StackOverflow,
    /// A return with an empty stack.
    StackUnderflow,
    /// A key instruction names a key beyond `0xF`.
    KeyOutOfRange,
}

/// A fatal error, with the address and the word of the instruction that
/// caused it (the word is 0 where it could not be fetched).
#[derive(Clone, Copy, PartialEq, Eq, Structural, Debug)]
pub struct Fault {
    pub kind: FaultKind,
    pub address: u16,
    pub opcode: u16,
}

/// The abstract state of the machine.
pub struct Machine {
    /// The 4096 bytes of memory.
    pub memory: Seq<u8>,
    /// Registers `V0..=VF`; `VF` is the flag register.
    pub v: Seq<u8>,
    /// Return addresses, the most recent last.
    pub stack: Seq<u16>,
    /// Which of the sixteen keys are held down.
    pub keys: Seq<bool>,
    /// The program counter.
    pub pc: u16,
    /// The address register `I`.
    pub i: u16,
    /// The delay timer.
    pub delay: u8,
    /// The sound timer.
    pub sound: u8,
    /// Whether execution waits for a key.
    pub wait: KeyWait,
    /// The framebuffer, row by row.
    pub grid: Seq<bool>,
    /// The dialect followed.
    pub quirks: Quirks,
}

impl Machine {
    /// Every component has its fixed size, the stack holds at most sixteen
    /// addresses, and an awaited register exists.
    pub open spec fn wf(self) -> bool {
        &&& self.memory.len() == 4096
        &&& self.v.len() == 16
        &&& self.stack.len() <= 16
        &&& self.keys.len() == 16
        &&& self.grid.len() == 2048
        &&& self.wait matches KeyWait::Waiting(r) ==> r < 16
    }
}

/// The built-in glyphs of the hexadecimal digits, five rows each; digit `d`
/// starts at byte `5 * d`.
pub open spec fn font() -> Seq<u8> {
    seq![
        0xF0, 0x90, 0x90, 0x90, 0xF0,
        0x20, 0x60, 0x20, 0x20, 0x70,
        0xF0, 0x10, 0xF0, 0x80, 0xF0,
        0xF0, 0x10, 0xF0, 0x10, 0xF0,
        0x90, 0x90, 0xF0, 0x10, 0x10,
        0xF0, 0x80, 0xF0, 0x10, 0xF0,
        0xF0, 0x80, 0xF0, 0x90, 0xF0,
        0xF0, 0x10, 0x20, 0x40, 0x40,
        0xF0, 0x90, 0xF0, 0x90, 0xF0,
        0xF0, 0x90, 0xF0, 0x10, 0xF0,
        0xF0, 0x90, 0xF0, 0x90, 0x90,
        0xE0, 0x90, 0xE0, 0x90, 0xE0,
        0xF0, 0x80, 0x80, 0x80, 0xF0,
        0xE0, 0x90, 0x90, 0x90, 0xE0,
        0xF0, 0x80, 0xF0, 0x80, 0xF0,
        0xF0, 0x80, 0xF0, 0x80, 0x80,
    ]
}

/// The machine as it is created: memory, registers, stack, timers and keys
/// zeroed, the program counter at `0x200`, not waiting, the grid unlit.
pub open spec fn power_on(quirks: Quirks) -> Machine {
    Machine {
        memory: Seq::new(4096, |a: int| 0u8),
        v: Seq::new(16, |r: int| 0u8),
        stack: Seq::empty(),
        keys: Seq::new(16, |k: int| false),
        pc: 0x200,
        i: 0,
        delay: 0,
        sound: 0,
        wait: KeyWait::Running,
        grid: blank_grid(),
        quirks,
    }
}

/// How many bytes of a program of `len` bytes fit.
pub open spec fn loaded_len(len: int) -> int {
    if len < 0xDFF {
        len
    } else {
        0xDFF
    }
}

/// Memory after loading `rom`: the font at the start, as much of the program
/// as fits from `0x200`, every other byte unchanged.
pub open spec fn loaded_memory(memory: Seq<u8>, rom: Seq<u8>) -> Seq<u8> {
    Seq::new(
        4096,
        |a: int|
            if a < 80 {
                font()[a]
            } else if 0x200 <= a < 0x200 + loaded_len(rom.len() as int) {
                rom[a - 0x200]
            } else {
                memory[a]
            },
    )
}

/// Writes register `Vx`.
pub open spec fn with_reg(s: Machine, x: u8, val: u8) -> Machine {
    Machine { v: s.v.update(x as int, val), ..s }
}

/// Writes the flag register `VF`.
pub open spec fn with_flag(s: Machine, val: u8) -> Machine {
    with_reg(s, 15, val)
}

/// Skips the next instruction when `cond` holds.
pub open spec fn skip_if(s: Machine, cond: bool) -> Machine {
    if cond {
        Machine { pc: (s.pc + 2) as u16, ..s }
    } else {
        s
    }
}

/// `8xy1`..`8xy3` write `Vx`, then reset `VF` where the dialect asks it.
pub open spec fn logic_result(s: Machine, x: u8, val: u8) -> Machine {
    if s.quirks.logic_resets_flag {
        with_flag(with_reg(s, x, val), 0)
    } else {
        with_reg(s, x, val)
    }
}

/// The register that the shifts read.
pub open spec fn shift_source(s: Machine, x: u8, y: u8) -> u8 {
    if s.quirks.shift_reads_vy {
        s.v[y as int]
    } else {
        s.v[x as int]
    }
}

/// `a + b` modulo 256, and whether the unsigned sum exceeds 255.
pub open spec fn add8(a: u8, b: u8) -> (u8, bool) {
    (((a + b) % 256) as u8, a + b > 255)
}

/// `a - b` modulo 256, and whether no borrow occurred.
pub open spec fn sub8(a: u8, b: u8) -> (u8, bool) {
    (((a - b + 256) % 256) as u8, a >= b)
}

/// The value a flag register takes for a condition.
pub open spec fn flag_of(b: bool) -> u8 {
    if b {
        1
    } else {
        0
    }
}

/// Memory with `V0..=Vx` stored from address `i`.
pub open spec fn stored_regs(s: Machine, x: u8) -> Seq<u8> {
    Seq::new(
        4096,
        |a: int|
            if s.i <= a <= s.i + x {
                s.v[a - s.i]
            } else {
                s.memory[a]
            },
    )
}

/// Registers with `V0..=Vx` read from memory at address `i`.
pub open spec fn loaded_regs(s: Machine, x: u8) -> Seq<u8> {
    Seq::new(
        16,
        |r: int|
            if r <= x {
                s.memory[s.i + r]
            } else {
                s.v[r]
            },
    )
}

/// The effect of one instruction, executed with the program counter already
/// past it: the new state and whether the grid was affected, or the fault.
pub open spec fn exec_spec(s: Machine, ins: Instr, rnd: u8) -> Result<(Machine, bool), FaultKind> {
    match ins {
        Instr::Clear => Ok((Machine { grid: blank_grid(), ..s }, true)),
        Instr::Return => if s.stack.len() == 0 {
            Err(FaultKind::StackUnderflow)
        } else {
            Ok((Machine { pc: s.stack.last(), stack: s.stack.drop_last(), ..s }, false))
        },
        Instr::Jump(a) => Ok((Machine { pc: a, ..s }, false)),
        Instr::Call(a) => if s.stack.len() >= 16 {
            Err(FaultKind::StackOverflow)
        } else {
            Ok((Machine { pc: a, stack: s.stack.push(s.pc), ..s }, false))
        },
        Instr::SkipEqImm(x, kk) => Ok((skip_if(s, s.v[x as int] == kk), false)),
        Instr::SkipNeImm(x, kk) => Ok((skip_if(s, s.v[x as int] != kk), false)),
        Instr::SkipEqReg(x, y) => Ok((skip_if(s, s.v[x as int] == s.v[y as int]), false)),
        Instr::SkipNeReg(x, y) => Ok((skip_if(s, s.v[x as int] != s.v[y as int]), false)),
        Instr::LoadImm(x, kk) => Ok((with_reg(s, x, kk), false)),
        Instr::AddImm(x, kk) => Ok((with_reg(s, x, add8(s.v[x as int], kk).0), false)),
        Instr::Move(x, y) => Ok((with_reg(s, x, s.v[y as int]), false)),
        Instr::Or(x, y) => Ok((logic_result(s, x, s.v[x as int] | s.v[y as int]), false)),
        Instr::And(x, y) => Ok((logic_result(s, x, s.v[x as int] & s.v[y as int]), false)),
        Instr::Xor(x, y) => Ok((logic_result(s, x, s.v[x as int] ^ s.v[y as int]), false)),
        Instr::Add(x, y) => {
            let (r, carry) = add8(s.v[x as int], s.v[y as int]);
            Ok((with_flag(with_reg(s, x, r), flag_of(carry)), false))
        },
        Instr::Sub(x, y) => {
            let (r, no_borrow) = sub8(s.v[x as int], s.v[y as int]);
            Ok((with_flag(with_reg(s, x, r), flag_of(no_borrow)), false))
        },
        Instr::SubReversed(x, y) => {
            let (r, no_borrow) = sub8(s.v[y as int], s.v[x as int]);
            Ok((with_flag(with_reg(s, x, r), flag_of(no_borrow)), false))
        },
        Instr::ShiftRight(x, y) => {
            let src = shift_source(s, x, y);
            Ok((with_flag(with_reg(s, x, src / 2), src % 2), false))
        },
        Instr::ShiftLeft(x, y) => {
            let src = shift_source(s, x, y);
            Ok((with_flag(with_reg(s, x, ((src * 2) % 256) as u8), src / 128), false))
        },
        Instr::SetIndex(a) => Ok((Machine { i: a, ..s }, false)),
        Instr::JumpOffset(a) => Ok((Machine { pc: (a + s.v[0]) as u16, ..s }, false)),
        Instr::Random(x, kk) => Ok((with_reg(s, x, kk & rnd), false)),
        Instr::Draw(x, y, n) => if s.i + n > 4096 {
            Err(FaultKind::MemoryOutOfRange)
        } else {
            let sprite = s.memory.subrange(s.i as int, s.i + n);
            let vx = s.v[x as int];
            let vy = s.v[y as int];
            Ok(
                (
                    with_flag(
                        Machine { grid: drawn(s.grid, vx, vy, sprite), ..s },
                        flag_of(collides(s.grid, vx, vy, sprite)),
                    ),
                    true,
                ),
            )
        },
        Instr::SkipKeyDown(x) => if s.v[x as int] >= 16 {
            Err(FaultKind::KeyOutOfRange)
        } else {
            Ok((skip_if(s, s.keys[s.v[x as int] as int]), false))
        },
        Instr::SkipKeyUp(x) => if s.v[x as int] >= 16 {
            Err(FaultKind::KeyOutOfRange)
        } else {
            Ok((skip_if(s, !s.keys[s.v[x as int] as int]), false))
        },
        Instr::ReadDelay(x) => Ok((with_reg(s, x, s.delay), false)),
        Instr::WaitKey(x) => Ok((Machine { wait: KeyWait::Waiting(x), ..s }, false)),
        Instr::SetDelay(x) => Ok((Machine { delay: s.v[x as int], ..s }, false)),
        Instr::SetSound(x) => Ok((Machine { sound: s.v[x as int], ..s }, false)),
        Instr::AddIndex(x) => if s.i + s.v[x as int] > 0xFFFF {
            Err(FaultKind::MemoryOutOfRange)
        } else {
            Ok((Machine { i: (s.i + s.v[x as int]) as u16, ..s }, false))
        },
        Instr::FontGlyph(x) => Ok((Machine { i: (s.v[x as int] * 5) as u16, ..s }, false)),
        Instr::StoreBcd(x) => if s.i + 2 >= 4096 {
            Err(FaultKind::MemoryOutOfRange)
        } else {
            let vx = s.v[x as int];
            let memory = s.memory.update(s.i as int, vx / 100).update(
                s.i + 1,
                vx % 100 / 10,
            ).update(s.i + 2, vx % 10);
            Ok((Machine { memory, ..s }, false))
        },
        Instr::StoreRegs(x) => if s.i + x >= 4096 {
            Err(FaultKind::MemoryOutOfRange)
        } else {
            Ok((Machine { memory: stored_regs(s, x), i: (s.i + x + 1) as u16, ..s }, false))
        },
        Instr::LoadRegs(x) => if s.i + x >= 4096 {
            Err(FaultKind::MemoryOutOfRange)
        } else {
            Ok((Machine { v: loaded_regs(s, x), i: (s.i + x + 1) as u16, ..s }, false))
        },
    }
}

/// The big-endian word at `pc`.
pub open spec fn word_at(memory: Seq<u8>, pc: int) -> u16 {
    (memory[pc] * 256 + memory[pc + 1]) as u16
}

/// One fetch-decode-execute step: the new state and whether the grid was
/// affected, or the fault with the state unchanged. While waiting for a key
/// nothing happens.
pub open spec fn step_spec(s: Machine, rnd: u8) -> (Machine, Result<bool, Fault>) {
    if s.wait matches KeyWait::Waiting(_) {
        (s, Ok(false))
    } else if s.pc + 1 >= 4096 {
        (s, Err(Fault { kind: FaultKind::MemoryOutOfRange, address: s.pc, opcode: 0 }))
    } else {
        let w = word_at(s.memory, s.pc as int);
        match decode_spec(w) {
            None => (s, Err(Fault { kind: FaultKind::UnknownOpcode, address: s.pc, opcode: w })),
            Some(ins) => match exec_spec(Machine { pc: (s.pc + 2) as u16, ..s }, ins, rnd) {
                Ok((t, d)) => (t, Ok(d)),
                Err(k) => (s, Err(Fault { kind: k, address: s.pc, opcode: w })),
            },
        }
    }
}

/// A key changes state; a release while waiting stores the key's index in
/// the awaited register and resumes execution.
pub open spec fn key_spec(s: Machine, key: u8, pressed: bool) -> Machine {
    let t = Machine { keys: s.keys.update(key as int, pressed), ..s };
    match s.wait {
        KeyWait::Waiting(r) => if !pressed {
            Machine { wait: KeyWait::Running, ..with_reg(t, r, key) }
        } else {
            t
        },
        KeyWait::Running => t,
    }
}

/// Counts a timer down by one, stopping at zero.
pub open spec fn count_down(t: u8) -> u8 {
    if t > 0 {
        (t - 1) as u8
    } else {
        0
    }
}

/// Relies on rand::random: a byte from the thread-local generator. Any value
/// may come.
#[verifier::external_body]
pub(crate) fn random_byte() -> (r: u8) {
    rand::random::<u8>()
}

/// A vector of `len` copies of `val`.
fn filled<T: Copy>(val: T, len: usize) -> (r: Vec<T>)
    ensures
        r@ == Seq::new(len as nat, |k: int| val),
{
    let mut r: Vec<T> = Vec::new();
    while r.len() < len
        invariant
            r.len() <= len,
            forall|k: int| 0 <= k < r.len() ==> r@[k] == val,
        decreases len - r.len(),
    {
        r.push(val);
    }
    assert(r@ =~= Seq::new(len as nat, |k: int| val));
    r
}

/// The glyph table as bytes.
fn font_bytes() -> (r: Vec<u8>)
    ensures
        r@ == font(),
{
    let r: Vec<u8> = vec![
        0xF0, 0x90, 0x90, 0x90, 0xF0,
        0x20, 0x60, 0x20, 0x20, 0x70,
        0xF0, 0x10, 0xF0, 0x80, 0xF0,
        0xF0, 0x10, 0xF0, 0x10, 0xF0,
        0x90, 0x90, 0xF0, 0x10, 0x10,
        0xF0, 0x80, 0xF0, 0x10, 0xF0,
        0xF0, 0x80, 0xF0, 0x90, 0xF0,
        0xF0, 0x10, 0x20, 0x40, 0x40,
        0xF0, 0x90, 0xF0, 0x90, 0xF0,
        0xF0, 0x90, 0xF0, 0x10, 0xF0,
        0xF0, 0x90, 0xF0, 0x90, 0x90,
        0xE0, 0x90, 0xE0, 0x90, 0xE0,
        0xF0, 0x80, 0x80, 0x80, 0xF0,
        0xE0, 0x90, 0x90, 0x90, 0xE0,
        0xF0, 0x80, 0xF0, 0x80, 0xF0,
        0xF0, 0x80, 0xF0, 0x80, 0x80,
    ];
    assert(r@ =~= font());
    r
}

/// A CHIP-8 interpreter: memory, registers, call stack, timers, keypad and
/// framebuffer.
pub struct Device {
    screen: Screen,
    memory: Vec<u8>,
    registers: Vec<u8>,
    stack: Vec<u16>,
    keys: Vec<bool>,
    pc: u16,
    i: u16,
    dt: u8,
    st: u8,
    wait_key: KeyWait,
    quirks: Quirks,
}

impl View for Device {
    type V = Machine;

    closed spec fn view(&self) -> Machine {
        Machine {
            memory: self.memory@,
            v: self.registers@,
            stack: self.stack@,
            keys: self.keys@,
            pc: self.pc,
            i: self.i,
            delay: self.dt,
            sound: self.st,
            wait: self.wait_key,
            grid: self.screen@,
            quirks: self.quirks,
        }
    }
}

impl Device {
    /// The machine state is well formed.
    pub open spec fn wf(&self) -> bool {
        self@.wf()
    }

    /// A machine with both dialect flags off: the logic instructions leave
    /// `VF` alone and the shifts read `Vx`.
    pub fn new() -> (r: Device)
        ensures
            r.wf(),
            r@ == power_on(Quirks { logic_resets_flag: false, shift_reads_vy: false }),
    {
        Device::with_quirks(Quirks { logic_resets_flag: false, shift_reads_vy: false })
    }

    /// A machine that follows the given dialect.
    pub fn with_quirks(quirks: Quirks) -> (r: Device)
        ensures
            r.wf(),
            r@ == power_on(quirks),
    {
        let r = Device {
            screen: Screen::new(),
            memory: filled(0u8, MEMORY_SIZE),
            registers: filled(0u8, 16),
            stack: Vec::new(),
            keys: filled(false, 16),
            pc: PROGRAM_START,
            i: 0,
            dt: 0,
            st: 0,
            wait_key: KeyWait::Running,
            quirks,
        };
        assert(r@.stack =~= Seq::<u16>::empty());
        r
    }

    /// Installs the font at address 0 and copies the program to `0x200`,
    /// keeping only the first `0xDFF` bytes of a longer one. Returns how many
    /// program bytes were loaded: fewer than `rom.len()` means truncation.
    pub fn load(&mut self, rom: &[u8]) -> (loaded: usize)
        requires
            old(self).wf(),
        ensures
            final(self).wf(),
            loaded == loaded_len(rom@.len() as int),
            final(self)@ == (Machine { memory: loaded_memory(old(self)@.memory, rom@), ..old(self)@ }),
    {
        let ghost s0 = self@;
        let ghost mem0 = self.memory@;
        let loaded: usize = if rom.len() < PROGRAM_CAPACITY {
            rom.len()
        } else {
            PROGRAM_CAPACITY
        };
        let mut k: usize = 0;
        while k < loaded
            invariant
                loaded == loaded_len(rom@.len() as int),
                k <= loaded,
                s0 == old(self)@,
                mem0 == s0.memory,
                s0.wf(),
                self@ == (Machine { memory: self.memory@, ..s0 }),
                self.memory.len() == 4096,
                forall|a: int|
                    0 <= a < 4096 ==> #[trigger] self.memory@[a] == if 0x200 <= a < 0x200 + k {
                        rom@[a - 0x200]
                    } else {
                        mem0[a]
                    },
            decreases loaded - k,
        {
            self.memory.set(0x200 + k, rom[k]);
            k += 1;
        }
        let glyphs = font_bytes();
        let mut k: usize = 0;
        while k < 80
            invariant
                loaded == loaded_len(rom@.len() as int),
                k <= 80,
                glyphs@ == font(),
                s0 == old(self)@,
                mem0 == s0.memory,
                s0.wf(),
                self@ == (Machine { memory: self.memory@, ..s0 }),
                self.memory.len() == 4096,
                forall|a: int|
                    0 <= a < 4096 ==> #[trigger] self.memory@[a] == if a < k {
                        font()[a]
                    } else if 0x200 <= a < 0x200 + loaded {
                        rom@[a - 0x200]
                    } else {
                        mem0[a]
                    },
            decreases 80 - k,
        {
            self.memory.set(k, glyphs[k]);
            k += 1;
        }
        assert(self.memory@ =~= loaded_memory(mem0, rom@));
        loaded
    }

    /// The instruction word at the program counter.
    fn fetch(&self) -> (r: Result<u16, Fault>)
        requires
            self.wf(),
        ensures
            match r {
                Ok(w) => self@.pc + 1 < 4096 && w == word_at(self@.memory, self@.pc as int),
                Err(f) => self@.pc + 1 >= 4096 && f == (Fault {
                    kind: FaultKind::MemoryOutOfRange,
                    address: self@.pc,
                    opcode: 0,
                }),
            },
    {
        let pc = self.pc as usize;
        if pc + 1 >= MEMORY_SIZE {
            return Err(Fault { kind: FaultKind::MemoryOutOfRange, address: self.pc, opcode: 0 });
        }
        let top = self.memory[pc] as u16;
        let bottom = self.memory[pc + 1] as u16;
        Ok(top * 256 + bottom)
    }

    /// Executes one instruction with the byte `random` standing for the
    /// random draw of `Cxkk`. Returns whether the grid was affected. While
    /// waiting for a key nothing happens. On a fault the state is unchanged.
    pub fn step(&mut self, random: u8) -> (r: Result<bool, Fault>)
        requires
            old(self).wf(),
        ensures
            final(self).wf(),
            step_spec(old(self)@, random) == (final(self)@, r),
    {
        if let KeyWait::Waiting(_) = self.wait_key {
            return Ok(false);
        }
        let pc = self.pc;
        let w = match self.fetch() {
            Ok(w) => w,
            Err(f) => {
                return Err(f);
            },
        };
        match decode(w) {
            None => Err(Fault { kind: FaultKind::UnknownOpcode, address: pc, opcode: w }),
            Some(ins) => {
                self.pc = pc + 2;
                match self.execute(ins, random) {
                    Ok(d) => Ok(d),
                    Err(kind) => {
                        self.pc = pc;
                        Err(Fault { kind, address: pc, opcode: w })
                    },
                }
            },
        }
    }

    /// Executes one instruction, drawing a random byte for `Cxkk`.
    pub fn tick(&mut self) -> (r: Result<bool, Fault>)
        requires
            old(self).wf(),
        ensures
            final(self).wf(),
            exists|random: u8| step_spec(old(self)@, random) == (final(self)@, r),
    {
        let random = random_byte();
        self.step(random)
    }
}

impl Device {
    /// Executes a decoded instruction, the program counter already past it.
    /// Returns whether the grid was affected; on a fault nothing changes.
    fn execute(&mut self, ins: Instr, random: u8) -> (r: Result<bool, FaultKind>)
        requires
            old(self).wf(),
            ins.wf(),
            old(self)@.pc <= 4096,
        ensures
            final(self).wf(),
            match r {
                Ok(d) => exec_spec(old(self)@, ins, random) == Ok::<(Machine, bool), FaultKind>(
                    (final(self)@, d),
                ),
                Err(k) => exec_spec(old(self)@, ins, random) == Err::<(Machine, bool), FaultKind>(k)
                    && final(self)@ == old(self)@,
            },
    {
        match ins {
            Instr::Clear => {
                self.screen.clear();
                Ok(true)
            },
            Instr::Return => match self.stack.pop() {
                Some(a) => {
                    self.pc = a;
                    Ok(false)
                },
                None => Err(FaultKind::StackUnderflow),
            },
            Instr::Jump(a) => {
                self.pc = a;
                Ok(false)
            },
            Instr::Call(a) => {
                if self.stack.len() >= STACK_DEPTH {
                    return Err(FaultKind::StackOverflow);
                }
                self.stack.push(self.pc);
                self.pc = a;
                Ok(false)
            },
            Instr::SkipEqImm(x, kk) => {
                if self.registers[x as usize] == kk {
                    self.pc = self.pc + 2;
                }
                Ok(false)
            },
            Instr::SkipNeImm(x, kk) => {
                if self.registers[x as usize] != kk {
                    self.pc = self.pc + 2;
                }
                Ok(false)
            },
            Instr::SkipEqReg(x, y) => {
                if self.registers[x as usize] == self.registers[y as usize] {
                    self.pc = self.pc + 2;
                }
                Ok(false)
            },
            Instr::SkipNeReg(x, y) => {
                if self.registers[x as usize] != self.registers[y as usize] {
                    self.pc = self.pc + 2;
                }
                Ok(false)
            },
            Instr::LoadImm(x, kk) => {
                self.registers.set(x as usize, kk);
                Ok(false)
            },
            Instr::AddImm(x, kk) => {
                let sum = self.registers[x as usize] as u16 + kk as u16;
                self.registers.set(x as usize, (sum % 256) as u8);
                Ok(false)
            },
            Instr::Move(x, y) => {
                let vy = self.registers[y as usize];
                self.registers.set(x as usize, vy);
                Ok(false)
            },
            Instr::Or(x, y) => {
                let val = self.registers[x as usize] | self.registers[y as usize];
                self.set_logic_result(x, val);
                Ok(false)
            },
            Instr::And(x, y) => {
                let val = self.registers[x as usize] & self.registers[y as usize];
                self.set_logic_result(x, val);
                Ok(false)
            },
            Instr::Xor(x, y) => {
                let val = self.registers[x as usize] ^ self.registers[y as usize];
                self.set_logic_result(x, val);
                Ok(false)
            },
            Instr::Add(x, y) => {
                let sum = self.registers[x as usize] as u16 + self.registers[y as usize] as u16;
                self.registers.set(x as usize, (sum % 256) as u8);
                self.set_flag(sum > 255);
                Ok(false)
            },
            Instr::Sub(x, y) => {
                let a = self.registers[x as usize];
                let b = self.registers[y as usize];
                self.set_difference(x, a, b);
                Ok(false)
            },
            Instr::SubReversed(x, y) => {
                let a = self.registers[y as usize];
                let b = self.registers[x as usize];
                self.set_difference(x, a, b);
                Ok(false)
            },
            Instr::ShiftRight(x, y) => {
                let src = if self.quirks.shift_reads_vy {
                    self.registers[y as usize]
                } else {
                    self.registers[x as usize]
                };
                self.registers.set(x as usize, src / 2);
                self.registers.set(15, src % 2);
                Ok(false)
            },
            Instr::ShiftLeft(x, y) => {
                let src = if self.quirks.shift_reads_vy {
                    self.registers[y as usize]
                } else {
                    self.registers[x as usize]
                };
                self.registers.set(x as usize, ((src as u16 * 2) % 256) as u8);
                self.registers.set(15, src / 128);
                Ok(false)
            },
            Instr::SetIndex(a) => {
                self.i = a;
                Ok(false)
            },
            Instr::JumpOffset(a) => {
                self.pc = a + self.registers[0] as u16;
                Ok(false)
            },
            Instr::Random(x, kk) => {
                self.registers.set(x as usize, kk & random);
                Ok(false)
            },
            Instr::Draw(x, y, n) => self.op_dxyn(x, y, n),
            Instr::SkipKeyDown(x) => {
                let key = self.registers[x as usize];
                if key >= 16 {
                    return Err(FaultKind::KeyOutOfRange);
                }
                if self.keys[key as usize] {
                    self.pc = self.pc + 2;
                }
                Ok(false)
            },
            Instr::SkipKeyUp(x) => {
                let key = self.registers[x as usize];
                if key >= 16 {
                    return Err(FaultKind::KeyOutOfRange);
                }
                if !self.keys[key as usize] {
                    self.pc = self.pc + 2;
                }
                Ok(false)
            },
            Instr::ReadDelay(x) => {
                let dt = self.dt;
                self.registers.set(x as usize, dt);
                Ok(false)
            },
            Instr::WaitKey(x) => {
                self.wait_key = KeyWait::Waiting(x);
                Ok(false)
            },
            Instr::SetDelay(x) => {
                self.dt = self.registers[x as usize];
                Ok(false)
            },
            Instr::SetSound(x) => {
                self.st = self.registers[x as usize];
                Ok(false)
            },
            Instr::AddIndex(x) => {
                let sum = self.i as u32 + self.registers[x as usize] as u32;
                if sum > 0xFFFF {
                    return Err(FaultKind::MemoryOutOfRange);
                }
                self.i = sum as u16;
                Ok(false)
            },
            Instr::FontGlyph(x) => {
                self.i = self.registers[x as usize] as u16 * 5;
                Ok(false)
            },
            Instr::StoreBcd(x) => self.op_fx33(x),
            Instr::StoreRegs(x) => self.op_fx55(x),
            Instr::LoadRegs(x) => self.op_fx65(x),
        }
    }

    /// Writes `VF`.
    fn set_flag(&mut self, value: bool)
        requires
            old(self).wf(),
        ensures
            final(self).wf(),
            final(self)@ == with_flag(old(self)@, flag_of(value)),
    {
        self.registers.set(15, if value {
            1
        } else {
            0
        });
    }

    /// Result of `8xy1`..`8xy3`.
    fn set_logic_result(&mut self, x: u8, val: u8)
        requires
            old(self).wf(),
            x < 16,
        ensures
            final(self).wf(),
            final(self)@ == logic_result(old(self)@, x, val),
    {
        self.registers.set(x as usize, val);
        if self.quirks.logic_resets_flag {
            self.registers.set(15, 0);
        }
    }

    /// `Vx := a - b` modulo 256, then `VF := 1` if no borrow occurred.
    fn set_difference(&mut self, x: u8, a: u8, b: u8)
        requires
            old(self).wf(),
            x < 16,
        ensures
            final(self).wf(),
            final(self)@ == with_flag(with_reg(old(self)@, x, sub8(a, b).0), flag_of(sub8(a, b).1)),
    {
        let diff = (a as u16 + 256 - b as u16) % 256;
        self.registers.set(x as usize, diff as u8);
        self.set_flag(a >= b);
    }

    /// `Dxyn`: draws the `n` bytes at `I` at `(Vx, Vy)`; `VF` reports a
    /// collision.
    fn op_dxyn(&mut self, x: u8, y: u8, n: u8) -> (r: Result<bool, FaultKind>)
        requires
            old(self).wf(),
            x < 16,
            y < 16,
            n < 16,
        ensures
            final(self).wf(),
            match r {
                Ok(d) => exec_spec(old(self)@, Instr::Draw(x, y, n), 0) == Ok::<
                    (Machine, bool),
                    FaultKind,
                >((final(self)@, d)),
                Err(k) => exec_spec(old(self)@, Instr::Draw(x, y, n), 0) == Err::<
                    (Machine, bool),
                    FaultKind,
                >(k) && final(self)@ == old(self)@,
            },
    {
        let start = self.i as usize;
        if start + n as usize > MEMORY_SIZE {
            return Err(FaultKind::MemoryOutOfRange);
        }
        let x_pos = self.registers[x as usize];
        let y_pos = self.registers[y as usize];
        let mut sprite: Vec<u8> = Vec::new();
        let mut k: usize = 0;
        while k < n as usize
            invariant
                start + n <= 4096,
                self.memory.len() == 4096,
                k <= n,
                self@ == old(self)@,
                sprite@ == self.memory@.subrange(start as int, start + k),
            decreases n - k,
        {
            sprite.push(self.memory[start + k]);
            k += 1;
        }
        let collision = self.screen.draw(x_pos, y_pos, sprite.as_slice());
        self.set_flag(collision);
        Ok(true)
    }

    /// `Fx33`: the hundreds, tens and ones of `Vx` at `I`, `I + 1`, `I + 2`.
    fn op_fx33(&mut self, x: u8) -> (r: Result<bool, FaultKind>)
        requires
            old(self).wf(),
            x < 16,
        ensures
            final(self).wf(),
            match r {
                Ok(d) => exec_spec(old(self)@, Instr::StoreBcd(x), 0) == Ok::<
                    (Machine, bool),
                    FaultKind,
                >((final(self)@, d)),
                Err(k) => exec_spec(old(self)@, Instr::StoreBcd(x), 0) == Err::<
                    (Machine, bool),
                    FaultKind,
                >(k) && final(self)@ == old(self)@,
            },
    {
        let at = self.i as usize;
        if at + 2 >= MEMORY_SIZE {
            return Err(FaultKind::MemoryOutOfRange);
        }
        let vx = self.registers[x as usize];
        self.memory.set(at, vx / 100);
        self.memory.set(at + 1, vx % 100 / 10);
        self.memory.set(at + 2, vx % 10);
        Ok(false)
    }

    /// `Fx55`: stores `V0..=Vx` from `I` on, then advances `I` by `x + 1`.
    fn op_fx55(&mut self, x: u8) -> (r: Result<bool, FaultKind>)
        requires
            old(self).wf(),
            x < 16,
        ensures
            final(self).wf(),
            match r {
                Ok(d) => exec_spec(old(self)@, Instr::StoreRegs(x), 0) == Ok::<
                    (Machine, bool),
                    FaultKind,
                >((final(self)@, d)),
                Err(k) => exec_spec(old(self)@, Instr::StoreRegs(x), 0) == Err::<
                    (Machine, bool),
                    FaultKind,
                >(k) && final(self)@ == old(self)@,
            },
    {
        let start = self.i as usize;
        if start + x as usize >= MEMORY_SIZE {
            return Err(FaultKind::MemoryOutOfRange);
        }
        let ghost s = self@;
        let mut k: usize = 0;
        while k <= x as usize
            invariant
                s == old(self)@,
                start == s.i,
                start + x < 4096,
                x < 16,
                k <= x + 1,
                s.wf(),
                self@ == (Machine { memory: self.memory@, ..s }),
                self.memory.len() == 4096,
                forall|a: int|
                    0 <= a < 4096 ==> #[trigger] self.memory@[a] == if start <= a < start + k {
                        s.v[a - start]
                    } else {
                        s.memory[a]
                    },
            decreases x + 1 - k,
        {
            self.memory.set(start + k, self.registers[k]);
            k += 1;
        }
        self.i = (start + x as usize + 1) as u16;
        assert(self.memory@ =~= stored_regs(s, x));
        Ok(false)
    }

    /// `Fx65`: reads `V0..=Vx` from `I` on, then advances `I` by `x + 1`.
    fn op_fx65(&mut self, x: u8) -> (r: Result<bool, FaultKind>)
        requires
            old(self).wf(),
            x < 16,
        ensures
            final(self).wf(),
            match r {
                Ok(d) => exec_spec(old(self)@, Instr::LoadRegs(x), 0) == Ok::<
                    (Machine, bool),
                    FaultKind,
                >((final(self)@, d)),
                Err(k) => exec_spec(old(self)@, Instr::LoadRegs(x), 0) == Err::<
                    (Machine, bool),
                    FaultKind,
                >(k) && final(self)@ == old(self)@,
            },
    {
        let start = self.i as usize;
        if start + x as usize >= MEMORY_SIZE {
            return Err(FaultKind::MemoryOutOfRange);
        }
        let ghost s = self@;
        let mut k: usize = 0;
        while k <= x as usize
            invariant
                s == old(self)@,
                start == s.i,
                start + x < 4096,
                x < 16,
                k <= x + 1,
                s.wf(),
                self@ == (Machine { v: self.registers@, ..s }),
                self.registers.len() == 16,
                forall|r: int|
                    0 <= r < 16 ==> #[trigger] self.registers@[r] == if r < k {
                        s.memory[start + r]
                    } else {
                        s.v[r]
                    },
            decreases x + 1 - k,
        {
            let byte = self.memory[start + k];
            self.registers.set(k, byte);
            k += 1;
        }
        self.i = (start + x as usize + 1) as u16;
        assert(self.registers@ =~= loaded_regs(s, x));
        Ok(false)
    }
}

impl Device {
    /// Records a key's new state. A release while waiting stores the key's
    /// index in the awaited register and resumes execution.
    pub fn handle_key(&mut self, key: u8, pressed: bool)
        requires
            old(self).wf(),
            key < 16,
        ensures
            final(self).wf(),
            final(self)@ == key_spec(old(self)@, key, pressed),
    {
        self.keys.set(key as usize, pressed);
        if let KeyWait::Waiting(r) = self.wait_key {
            if !pressed {
                self.registers.set(r as usize, key);
                self.wait_key = KeyWait::Running;
            }
        }
    }

    /// Counts the delay timer down by one unless it is zero.
    pub fn handle_delay(&mut self)
        requires
            old(self).wf(),
        ensures
            final(self).wf(),
            final(self)@ == (Machine { delay: count_down(old(self)@.delay), ..old(self)@ }),
    {
        if self.dt > 0 {
            self.dt = self.dt - 1;
        }
    }

    /// Counts the sound timer down by one unless it is zero. Returns whether
    /// it was running, that is whether the tone sounds during this frame.
    pub fn handle_sound(&mut self) -> (sounding: bool)
        requires
            old(self).wf(),
        ensures
            final(self).wf(),
            sounding == (old(self)@.sound > 0),
            final(self)@ == (Machine { sound: count_down(old(self)@.sound), ..old(self)@ }),
    {
        if self.st > 0 {
            self.st = self.st - 1;
            true
        } else {
            false
        }
    }

    /// Register `Vx`.
    pub fn register(&self, x: u8) -> (r: u8)
        requires
            self.wf(),
            x < 16,
        ensures
            r == self@.v[x as int],
    {
        self.registers[x as usize]
    }

    /// The byte at `address`.
    pub fn memory_at(&self, address: u16) -> (r: u8)
        requires
            self.wf(),
            address < 4096,
        ensures
            r == self@.memory[address as int],
    {
        self.memory[address as usize]
    }

    /// The program counter.
    pub fn pc(&self) -> (r: u16)
        ensures
            r == self@.pc,
    {
        self.pc
    }

    /// The address register `I`.
    pub fn index(&self) -> (r: u16)
        ensures
            r == self@.i,
    {
        self.i
    }

    /// The delay timer.
    pub fn delay_timer(&self) -> (r: u8)
        ensures
            r == self@.delay,
    {
        self.dt
    }

    /// The sound timer.
    pub fn sound_timer(&self) -> (r: u8)
        ensures
            r == self@.sound,
    {
        self.st
    }

    /// How many return addresses are on the stack.
    pub fn stack_depth(&self) -> (r: usize)
        ensures
            r == self@.stack.len(),
    {
        self.stack.len()
    }

    /// Whether key `key` is held down.
    pub fn is_pressed(&self, key: u8) -> (r: bool)
        requires
            self.wf(),
            key < 16,
        ensures
            r == self@.keys[key as int],
    {
        self.keys[key as usize]
    }

    /// Whether execution waits for a key.
    pub fn key_wait(&self) -> (r: KeyWait)
        ensures
            r == self@.wait,
    {
        self.wait_key
    }

    /// The dialect this machine follows.
    pub fn quirks(&self) -> (r: Quirks)
        ensures
            r == self@.quirks,
    {
        self.quirks
    }

    /// The framebuffer.
    pub fn screen(&self) -> (r: &Screen)
        ensures
            r@ == self@.grid,
    {
        &self.screen
    }
}

/// The state after one instruction that did not fault.
pub open spec fn after(s: Machine, ins: Instr, rnd: u8) -> Machine {
    exec_spec(s, ins, rnd)->Ok_0.0
}

/// `7xkk` adds modulo 256 and changes no other register, `VF` included;
/// `8xy4` adds modulo 256 and then sets `VF` to 1 exactly when the unsigned
/// sum exceeds 255, else to 0.
#[verifier::rlimit(50)]
pub proof fn lemma_add_wraps(s: Machine, x: u8, y: u8, kk: u8, rnd: u8)
    requires
        s.wf(),
        x < 16,
        y < 16,
    ensures
        exec_spec(s, Instr::AddImm(x, kk), rnd) is Ok,
        after(s, Instr::AddImm(x, kk), rnd).v[x as int] == (s.v[x as int] + kk) % 256,
        forall|r: int|
            0 <= r < 16 && r != x ==> after(s, Instr::AddImm(x, kk), rnd).v[r] == s.v[r],
        exec_spec(s, Instr::Add(x, y), rnd) is Ok,
        after(s, Instr::Add(x, y), rnd).v[15] == (if s.v[x as int] + s.v[y as int] > 255 {
            1u8
        } else {
            0u8
        }),
        x != 15 ==> after(s, Instr::Add(x, y), rnd).v[x as int] == (s.v[x as int] + s.v[y as int])
            % 256,
{
}

/// `8xy5` stores `Vx - Vy` and `8xy7` stores `Vy - Vx`, both modulo 256;
/// then `VF` is 1 exactly when the minuend is at least the subtrahend (no
/// borrow), else 0.
#[verifier::rlimit(50)]
pub proof fn lemma_sub_borrow(s: Machine, x: u8, y: u8, rnd: u8)
    requires
        s.wf(),
        x < 16,
        y < 16,
    ensures
        exec_spec(s, Instr::Sub(x, y), rnd) is Ok,
        after(s, Instr::Sub(x, y), rnd).v[15] == (if s.v[x as int] >= s.v[y as int] {
            1u8
        } else {
            0u8
        }),
        x != 15 ==> after(s, Instr::Sub(x, y), rnd).v[x as int] == (s.v[x as int] - s.v[y as int])
            % 256,
        exec_spec(s, Instr::SubReversed(x, y), rnd) is Ok,
        after(s, Instr::SubReversed(x, y), rnd).v[15] == (if s.v[y as int] >= s.v[x as int] {
            1u8
        } else {
            0u8
        }),
        x != 15 ==> after(s, Instr::SubReversed(x, y), rnd).v[x as int] == (s.v[y as int]
            - s.v[x as int]) % 256,
{
    let a = s.v[x as int] as int;
    let b = s.v[y as int] as int;
    assert((a - b + 256) % 256 == (a - b) % 256);
    assert((b - a + 256) % 256 == (b - a) % 256);
    assert(exec_spec(s, Instr::Sub(x, y), rnd) == Ok::<(Machine, bool), FaultKind>(
        (with_flag(with_reg(s, x, sub8(s.v[x as int], s.v[y as int]).0), flag_of(a >= b)), false),
    ));
    assert(exec_spec(s, Instr::SubReversed(x, y), rnd) == Ok::<(Machine, bool), FaultKind>(
        (with_flag(with_reg(s, x, sub8(s.v[y as int], s.v[x as int]).0), flag_of(b >= a)), false),
    ));
}

/// `00E0` leaves every pixel unlit, whatever was drawn before, and reports
/// that the grid was affected.
pub proof fn lemma_clear_unlights(s: Machine, rnd: u8)
    requires
        s.wf(),
    ensures
        exec_spec(s, Instr::Clear, rnd) == Ok::<(Machine, bool), FaultKind>(
            (after(s, Instr::Clear, rnd), true),
        ),
        after(s, Instr::Clear, rnd).grid.len() == 2048,
        forall|k: int| 0 <= k < 2048 ==> !after(s, Instr::Clear, rnd).grid[k],
{
}

/// A `2nnn` at `pc` followed by the `00EE` it reaches returns to `pc + 2`
/// with the stack as it was, whenever fewer than sixteen return addresses
/// are stacked; with sixteen stacked the call is a stack overflow and
/// changes nothing.
pub proof fn lemma_call_return(s: Machine, a: u16, r1: u8, r2: u8)
    requires
        s.wf(),
        s.wait == KeyWait::Running,
        s.pc + 1 < 4096,
        word_at(s.memory, s.pc as int) == 0x2000 + a,
        a + 1 < 4096,
        word_at(s.memory, a as int) == 0x00EE,
    ensures
        s.stack.len() < 16 ==> step_spec(s, r1).1 == Ok::<bool, Fault>(false),
        s.stack.len() < 16 ==> step_spec(s, r1).0.pc == a,
        s.stack.len() < 16 ==> step_spec(step_spec(s, r1).0, r2) == (
        Machine { pc: (s.pc + 2) as u16, ..s }, Ok::<bool, Fault>(false)),
        s.stack.len() == 16 ==> step_spec(s, r1) == (s, Err::<bool, Fault>(
            Fault { kind: FaultKind::StackOverflow, address: s.pc, opcode: (0x2000 + a) as u16 },
        )),
{
    let w = word_at(s.memory, s.pc as int);
    assert(decode_spec(w) == Some(Instr::Call(a)));
    assert(decode_spec(0x00EE) == Some(Instr::Return));
    if s.stack.len() < 16 {
        let t = step_spec(s, r1).0;
        assert(t.stack == s.stack.push((s.pc + 2) as u16));
        assert(t.memory == s.memory);
        assert(t.stack.drop_last() =~= s.stack);
    }
}

/// `Fx55` then `Fx65` with the same `x` and the same `I` reads back the
/// values that `V0..=Vx` held before the store, whatever the registers held
/// in between; both advance `I` by `x + 1`.
pub proof fn lemma_store_load_round_trip(s: Machine, x: u8, between: Seq<u8>, rnd: u8)
    requires
        s.wf(),
        x < 16,
        s.i + x < 4096,
        between.len() == 16,
    ensures
        exec_spec(s, Instr::StoreRegs(x), rnd) is Ok,
        after(s, Instr::StoreRegs(x), rnd).i == s.i + x + 1,
        exec_spec(Machine { i: s.i, v: between, ..after(s, Instr::StoreRegs(x), rnd) }, Instr::LoadRegs(x), rnd) is Ok,
        ({
            let u = after(
                Machine { i: s.i, v: between, ..after(s, Instr::StoreRegs(x), rnd) },
                Instr::LoadRegs(x),
                rnd,
            );
            &&& u.i == s.i + x + 1
            &&& forall|r: int| 0 <= r <= x ==> u.v[r] == s.v[r]
            &&& forall|r: int| x < r < 16 ==> u.v[r] == between[r]
        }),
{
}

} // verus!
